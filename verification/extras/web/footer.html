<footer class="footer footer-transparent d-print-none">
  <div class="container-xl">
    <div class="row text-center align-items-center flex-row-reverse">
      <div class="col-lg-auto ms-lg-auto">
        <nav aria-label="Footer">
          <ul class="list-inline list-inline-dots mb-0">
            <li class="list-inline-item"><a href="https://github.com/btafoya/CalStack/blob/main/LICENSE" target="_blank" class="link-secondary" rel="noopener">License</a></li>
            <li class="list-inline-item"><a href="https://github.com/btafoya/CalStack" target="_blank" class="link-secondary" rel="noopener">Source code</a></li>
          </ul>
        </nav>
      </div>
      <div class="col-12 col-lg-auto mt-3 mt-lg-0">
        <ul class="list-inline list-inline-dots mb-0">
          <li class="list-inline-item">Copyright © 2026 CalStack. All rights reserved.</li>
          <li class="list-inline-item">v<!-- version --></li>
        </ul>
      </div>
    </div>
  </div>
</footer>
