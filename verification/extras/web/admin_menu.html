<div class="navbar-expand-md flex-shrink-0">
  <div class="collapse navbar-collapse" id="navbar-menu">
    <div class="navbar w-100 bg-body border-bottom">
      <div class="container-fluid">
        <ul class="navbar-nav">
          <li class="nav-item"><a class="nav-link" href="/"><span class="nav-link-icon me-1"><i class="bi bi-calendar3"></i></span><span class="nav-link-title">Calendar</span></a></li>
          <li class="nav-item"><a class="nav-link" href="/categories"><span class="nav-link-icon me-1"><i class="bi bi-tags"></i></span><span class="nav-link-title">Categories</span></a></li>
          <li class="nav-item"><a class="nav-link" href="/contacts-ui"><span class="nav-link-icon me-1"><i class="bi bi-person-lines-fill"></i></span><span class="nav-link-title">Contacts</span></a></li>
          <li class="nav-item"><a class="nav-link" id="rules-link" href="/rules"><span class="nav-link-icon me-1"><i class="bi bi-sliders"></i></span><span class="nav-link-title">Rules</span></a></li>
          <li class="nav-item"><a class="nav-link" id="providers-nav-link" href="/providers"><span class="nav-link-icon me-1"><i class="bi bi-bell"></i></span><span class="nav-link-title">Providers</span></a></li>
          <li class="nav-item"><a class="nav-link" id="credentials-nav-link" href="/credentials"><span class="nav-link-icon me-1"><i class="bi bi-key"></i></span><span class="nav-link-title">Credentials</span></a></li>
          <li class="nav-item"><a class="nav-link" id="admin-nav-link" href="/admin"><span class="nav-link-icon me-1"><i class="bi bi-shield-lock"></i></span><span class="nav-link-title">Admin</span></a></li>
        </ul>
      </div>
    </div>
  </div>
</div>
