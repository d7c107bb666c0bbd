<!doctype html>
<html lang="en">
<head>
<meta charset="utf-8"><meta name="viewport" content="width=device-width, initial-scale=1">
<title>CalStack — API docs</title>
<link rel="stylesheet" href="/assets/css/swagger-ui.css">
<link rel="icon" type="image/png" sizes="32x32" href="/assets/img/favicon-32x32.png">
<style>body{margin:0}.topbar{display:none}</style>
</head>
<body>
<div id="swagger-ui"></div>
<script src="/assets/js/swagger-ui-bundle.js"></script>
<script>
SwaggerUIBundle({
  url: '/api/openapi.json',
  dom_id: '#swagger-ui',
  deepLinking: true,
  tryItOutEnabled: true,
});
</script>
</body></html>
